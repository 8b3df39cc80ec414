//! Decisions of the OpenPGP message engine, over plain descriptions of keys,
//! packets and verification results: which key signs, which subkeys receive a
//! session key, which certificates a verifier is handed, whether a message's
//! signatures are accepted, and in which order decryption strategies are tried.

use crate::bytes::{bytes_eq, first_index_of, lemma_first_index_of, lemma_prefix_first, position_of, views};
use vstd::prelude::*;

verus! {

/// Errors of the message engine.
#[derive(Clone, Copy, Debug, PartialEq, Eq, Structural)]
pub enum EngineError {
    /// The identity has no alive, non-revoked, signing-capable secret key.
    NoSigningKey,
    /// No local key and no password can open the message.
    NoDecryptionKey,
    /// A signature in some layer of the message did not verify.
    SignatureVerificationFailed,
    /// The chosen default key is not among the private certificates.
    UnknownDefaultKey,
    /// A decryption-capable key of a private certificate holds no secret.
    MissingSecret,
}

/// What the engine needs to know of one key of a certificate.
#[derive(Clone, Copy, Debug, PartialEq, Eq, Structural)]
pub struct KeyInfo {
    /// The key is valid under the verification policy.
    pub valid: bool,
    /// The key has not expired.
    pub alive: bool,
    /// The key has been revoked.
    pub revoked: bool,
    /// The key's public-key algorithm is supported.
    pub supported: bool,
    /// Secret key material is present.
    pub has_secret: bool,
    /// The key may sign data.
    pub for_signing: bool,
    /// The key may encrypt data in transit.
    pub for_transport_encryption: bool,
    /// The key may encrypt data at rest.
    pub for_storage_encryption: bool,
}

/// A key that can sign: it holds its secret and is valid, alive, not revoked
/// and signing-capable.
pub open spec fn can_sign(k: KeyInfo) -> bool {
    k.has_secret && k.valid && k.alive && !k.revoked && k.for_signing
}

/// A subkey that can receive a session key: valid, alive, not revoked, of a
/// supported algorithm and transport-encryption-capable.
pub open spec fn can_receive(k: KeyInfo) -> bool {
    k.valid && k.alive && !k.revoked && k.supported && k.for_transport_encryption
}

/// A key kept for decryption: valid and capable of transport or storage
/// encryption.
pub open spec fn can_decrypt(k: KeyInfo) -> bool {
    k.valid && (k.for_transport_encryption || k.for_storage_encryption)
}

/// The first index of `keys` whose key can sign.
pub open spec fn first_signing(keys: Seq<KeyInfo>) -> Option<int>
    decreases keys.len(),
{
    if keys.len() == 0 {
        None
    } else {
        match first_signing(keys.drop_last()) {
            Some(i) => Some(i),
            None => if can_sign(keys.last()) {
                Some(keys.len() - 1)
            } else {
                None
            },
        }
    }
}

/// The indices, in order, of the keys that satisfy `p`.
pub open spec fn indices_where(keys: Seq<KeyInfo>, p: spec_fn(KeyInfo) -> bool) -> Seq<usize>
    decreases keys.len(),
{
    if keys.len() == 0 {
        Seq::empty()
    } else {
        let rest = indices_where(keys.drop_last(), p);
        if p(keys.last()) {
            rest.push((keys.len() - 1) as usize)
        } else {
            rest
        }
    }
}

/// Picks the key that signs for an identity: the first one, in the
/// certificate's order, that holds a secret and is valid, alive, not revoked
/// and signing-capable.
pub fn signing_key(keys: &Vec<KeyInfo>) -> (r: Result<usize, EngineError>)
    ensures
        r == (match first_signing(keys@) {
            Some(i) => Ok(i as usize),
            None => Err(EngineError::NoSigningKey),
        }),
{
    let mut i: usize = 0;
    while i < keys.len()
        invariant
            i <= keys@.len(),
            first_signing(keys@.subrange(0, i as int)) is None,
        decreases keys@.len() - i,
    {
        assert(keys@.subrange(0, i + 1).drop_last() =~= keys@.subrange(0, i as int));
        let k = keys[i];
        if k.has_secret && k.valid && k.alive && !k.revoked && k.for_signing {
            proof {
                lemma_first_signing_prefix(keys@, i + 1);
            }
            return Ok(i);
        }
        i = i + 1;
    }
    assert(keys@.subrange(0, i as int) =~= keys@);
    Err(EngineError::NoSigningKey)
}

proof fn lemma_first_signing_prefix(s: Seq<KeyInfo>, n: int)
    requires
        0 <= n <= s.len(),
        first_signing(s.subrange(0, n)) is Some,
    ensures
        first_signing(s) == first_signing(s.subrange(0, n)),
    decreases s.len() - n,
{
    if n < s.len() {
        assert(s.subrange(0, n + 1).drop_last() =~= s.subrange(0, n));
        lemma_first_signing_prefix(s, n + 1);
    } else {
        assert(s.subrange(0, n) =~= s);
    }
}

/// The indices of the keys that satisfy the chosen filter, in order.
fn select_keys(keys: &Vec<KeyInfo>, receive: bool) -> (r: Vec<usize>)
    ensures
        receive ==> r@ == indices_where(keys@, |k: KeyInfo| can_receive(k)),
        !receive ==> r@ == indices_where(keys@, |k: KeyInfo| can_decrypt(k)),
{
    let ghost p = if receive {
        |k: KeyInfo| can_receive(k)
    } else {
        |k: KeyInfo| can_decrypt(k)
    };
    let mut out: Vec<usize> = Vec::new();
    let mut i: usize = 0;
    while i < keys.len()
        invariant
            i <= keys@.len(),
            p == (if receive {
                |k: KeyInfo| can_receive(k)
            } else {
                |k: KeyInfo| can_decrypt(k)
            }),
            out@ == indices_where(keys@.subrange(0, i as int), p),
        decreases keys@.len() - i,
    {
        assert(keys@.subrange(0, i + 1).drop_last() =~= keys@.subrange(0, i as int));
        let k = keys[i];
        let keep = if receive {
            k.valid && k.alive && !k.revoked && k.supported && k.for_transport_encryption
        } else {
            k.valid && (k.for_transport_encryption || k.for_storage_encryption)
        };
        assert(keep == p(k));
        if keep {
            out.push(i);
        }
        i = i + 1;
    }
    assert(keys@.subrange(0, i as int) =~= keys@);
    out
}

/// The subkeys of a recipient's certificate that a message is encrypted to:
/// those valid, alive, not revoked, of a supported algorithm and
/// transport-encryption-capable. Each receives its own session-key packet.
pub fn encryption_recipients(keys: &Vec<KeyInfo>) -> (r: Vec<usize>)
    ensures
        r@ == indices_where(keys@, |k: KeyInfo| can_receive(k)),
{
    select_keys(keys, true)
}

/// The keys of a private certificate that the engine keeps for decryption:
/// those valid and capable of transport or storage encryption. Each of them
/// must hold its secret.
pub fn decryption_keys(keys: &Vec<KeyInfo>) -> (r: Result<Vec<usize>, EngineError>)
    ensures
        ({
            let sel = indices_where(keys@, |k: KeyInfo| can_decrypt(k));
            match r {
                Ok(v) => v@ == sel && forall|j: int| 0 <= j < sel.len() ==> keys@[sel[j] as int].has_secret,
                Err(e) => e == EngineError::MissingSecret && exists|j: int|
                    0 <= j < sel.len() && !keys@[sel[j] as int].has_secret,
            }
        }),
{
    let sel = select_keys(keys, false);
    assert(keys@.len() == keys.len());
    proof {
        lemma_indices_in_range(keys@, |k: KeyInfo| can_decrypt(k));
    }
    let mut j: usize = 0;
    while j < sel.len()
        invariant
            sel@ == indices_where(keys@, |k: KeyInfo| can_decrypt(k)),
            forall|t: int| 0 <= t < sel@.len() ==> sel@[t] < keys@.len(),
            j <= sel@.len(),
            forall|t: int| 0 <= t < j ==> keys@[sel@[t] as int].has_secret,
        decreases sel@.len() - j,
    {
        if !keys[sel[j]].has_secret {
            return Err(EngineError::MissingSecret);
        }
        j = j + 1;
    }
    Ok(sel)
}

/// The selected indices are positions of `keys`.
pub proof fn lemma_indices_in_range(keys: Seq<KeyInfo>, p: spec_fn(KeyInfo) -> bool)
    requires
        keys.len() <= usize::MAX,
    ensures
        forall|t: int|
            0 <= t < indices_where(keys, p).len() ==> indices_where(keys, p)[t] < keys.len(),
    decreases keys.len(),
{
    if keys.len() > 0 {
        let rest = indices_where(keys.drop_last(), p);
        lemma_indices_in_range(keys.drop_last(), p);
        if p(keys.last()) {
            assert forall|t: int| 0 <= t < rest.len() + 1 implies #[trigger] rest.push(
                (keys.len() - 1) as usize,
            )[t] < keys.len() by {
                if t < rest.len() {
                    assert(rest.push((keys.len() - 1) as usize)[t] == rest[t]);
                }
            }
        }
    }
}

/// Finds the default certificate among the private ones, by key handle.
pub fn default_cert(handles: &Vec<Vec<u8>>, default: &[u8]) -> (r: Result<usize, EngineError>)
    ensures
        r == (match first_index_of(views(handles@), default@) {
            Some(i) => Ok(i as usize),
            None => Err(EngineError::UnknownDefaultKey),
        }),
{
    match position_of(handles, default) {
        Some(i) => Ok(i),
        None => Err(EngineError::UnknownDefaultKey),
    }
}

/// One layer of a message's structure, as seen by a verifier.
#[derive(Debug)]
pub enum Layer {
    /// A compression layer; it imposes nothing.
    Compression,
    /// An encryption layer; it imposes nothing.
    Encryption,
    /// A group of signatures, with whether each of them verified.
    SignatureGroup { results: Vec<bool> },
}

/// Every signature of every signature layer verified.
pub open spec fn all_signatures_valid(layers: Seq<Layer>) -> bool {
    forall|i: int| 0 <= i < layers.len() ==> #[trigger] layer_valid(layers[i])
}

/// Every signature of the layer verified; a layer without signatures is valid.
pub open spec fn layer_valid(layer: Layer) -> bool {
    match layer {
        Layer::SignatureGroup { results } => forall|j: int| 0 <= j < results@.len() ==> #[trigger] results@[j],
        _ => true,
    }
}

/// Whether every result of a signature group is a success.
fn group_valid(results: &Vec<bool>) -> (r: bool)
    ensures
        r == (forall|j: int| 0 <= j < results@.len() ==> #[trigger] results@[j]),
{
    let mut j: usize = 0;
    while j < results.len()
        invariant
            j <= results@.len(),
            forall|t: int| 0 <= t < j ==> results@[t],
        decreases results@.len() - j,
    {
        if !results[j] {
            return false;
        }
        j = j + 1;
    }
    true
}

/// The verification policy: a message is accepted when every signature in
/// every layer verified; one bad signature in any layer rejects it, whatever
/// the others say. Compression and encryption layers are passed over.
pub fn check_structure(layers: &Vec<Layer>) -> (r: Result<(), EngineError>)
    ensures
        r is Ok <==> all_signatures_valid(layers@),
        r matches Err(e) ==> e == EngineError::SignatureVerificationFailed,
{
    let mut i: usize = 0;
    while i < layers.len()
        invariant
            i <= layers@.len(),
            all_signatures_valid(layers@.subrange(0, i as int)),
        decreases layers@.len() - i,
    {
        let ok = match &layers[i] {
            Layer::SignatureGroup { results } => group_valid(results),
            _ => true,
        };
        assert(ok == layer_valid(layers@[i as int]));
        if !ok {
            assert(!layer_valid(layers@[i as int]));
            return Err(EngineError::SignatureVerificationFailed);
        }
        assert forall|a: int| 0 <= a < i + 1 implies #[trigger] layer_valid(
            layers@.subrange(0, i + 1)[a],
        ) by {
            if a < i {
                assert(layers@.subrange(0, i + 1)[a] == layers@.subrange(0, i as int)[a]);
            }
        }
        i = i + 1;
    }
    assert(layers@.subrange(0, i as int) =~= layers@);
    Ok(())
}

/// Some key of the certificate, by one of its handles, is among the requested ones.
pub open spec fn cert_requested(cert: Seq<Seq<u8>>, handles: Seq<Seq<u8>>) -> bool {
    exists|k: int| 0 <= k < cert.len() && handles.contains(#[trigger] cert[k])
}

/// The indices, in order, of the certificates that hold a requested key handle.
pub open spec fn matching_certs(certs: Seq<Seq<Seq<u8>>>, handles: Seq<Seq<u8>>) -> Seq<usize>
    decreases certs.len(),
{
    if certs.len() == 0 {
        Seq::empty()
    } else {
        let rest = matching_certs(certs.drop_last(), handles);
        if cert_requested(certs.last(), handles) {
            rest.push((certs.len() - 1) as usize)
        } else {
            rest
        }
    }
}

/// The views of certificates, each given by the handles of its keys.
pub open spec fn cert_views(certs: Seq<Vec<Vec<u8>>>) -> Seq<Seq<Seq<u8>>> {
    certs.map_values(|c: Vec<Vec<u8>>| views(c@))
}

/// Whether some handle equals `x`.
fn is_requested(handles: &Vec<Vec<u8>>, x: &[u8]) -> (r: bool)
    ensures
        r == views(handles@).contains(x@),
{
    let found = position_of(handles, x);
    proof {
        lemma_first_index_of(views(handles@), x@);
    }
    found.is_some()
}

/// Whether some key handle of a certificate is requested.
fn any_requested(cert: &Vec<Vec<u8>>, handles: &Vec<Vec<u8>>) -> (r: bool)
    ensures
        r == cert_requested(views(cert@), views(handles@)),
{
    let ghost c = views(cert@);
    let mut k: usize = 0;
    while k < cert.len()
        invariant
            c == views(cert@),
            k <= cert@.len(),
            forall|t: int| 0 <= t < k ==> !views(handles@).contains(#[trigger] c[t]),
        decreases cert@.len() - k,
    {
        if is_requested(handles, cert[k].as_slice()) {
            assert(c[k as int] == cert@[k as int]@);
            return true;
        }
        k = k + 1;
    }
    false
}

/// The certificates a verifier is handed for the key handles that a message's
/// signatures name: each known certificate one of whose keys, by fingerprint
/// or key ID, is requested. A certificate is given by the handles of its keys.
pub fn certs_for_handles(cert_handles: &Vec<Vec<Vec<u8>>>, handles: &Vec<Vec<u8>>) -> (r: Vec<usize>)
    ensures
        r@ == matching_certs(cert_views(cert_handles@), views(handles@)),
{
    let ghost certs = cert_views(cert_handles@);
    let mut out: Vec<usize> = Vec::new();
    let mut i: usize = 0;
    while i < cert_handles.len()
        invariant
            certs == cert_views(cert_handles@),
            i <= cert_handles@.len(),
            out@ == matching_certs(certs.subrange(0, i as int), views(handles@)),
        decreases cert_handles@.len() - i,
    {
        assert(certs.subrange(0, i + 1).drop_last() =~= certs.subrange(0, i as int));
        if any_requested(&cert_handles[i], handles) {
            out.push(i);
        }
        i = i + 1;
    }
    assert(certs.subrange(0, i as int) =~= certs);
    out
}

/// A session-key packet encrypted to a public key.
#[derive(Debug)]
pub struct SessionKeyPacket {
    /// The key ID of the recipient key.
    pub recipient: Vec<u8>,
    /// Whether the packet's public-key algorithm is supported.
    pub algorithm_supported: bool,
}

/// A locally held secret key.
#[derive(Debug)]
pub struct SecretKeyEntry {
    /// The key ID of the key.
    pub key_id: Vec<u8>,
    /// Whether the secret is protected by a passphrase.
    pub protected: bool,
}

/// One decryption strategy, tried against the message.
#[derive(Clone, Copy, Debug, PartialEq, Eq, Structural)]
pub enum Attempt {
    /// Decrypt session-key packet `packet` with the unprotected secret `secret`.
    Unprotected { packet: usize, secret: usize },
    /// Ask for the passphrase of secret `secret`, unlock it, and decrypt
    /// session-key packet `packet` with it.
    Unlock { packet: usize, secret: usize },
    /// Ask for the message password, again until it opens a password-derived packet.
    Password,
}

/// The key IDs of the local secrets, in order.
pub open spec fn secret_ids(secrets: Seq<SecretKeyEntry>) -> Seq<Seq<u8>> {
    secrets.map_values(|e: SecretKeyEntry| e.key_id@)
}

/// The attempt, in one stage, for the packet at index `i`.
pub open spec fn stage_attempt(
    p: SessionKeyPacket,
    i: int,
    secrets: Seq<SecretKeyEntry>,
    protected_stage: bool,
) -> Option<Attempt> {
    match first_index_of(secret_ids(secrets), p.recipient@) {
        Some(j) => if !protected_stage && !secrets[j].protected {
            Some(Attempt::Unprotected { packet: i as usize, secret: j as usize })
        } else if protected_stage && secrets[j].protected && p.algorithm_supported {
            Some(Attempt::Unlock { packet: i as usize, secret: j as usize })
        } else {
            None
        },
        None => None,
    }
}

/// The attempts of one stage, packet by packet.
pub open spec fn stage_attempts(
    packets: Seq<SessionKeyPacket>,
    secrets: Seq<SecretKeyEntry>,
    protected_stage: bool,
) -> Seq<Attempt>
    decreases packets.len(),
{
    if packets.len() == 0 {
        Seq::empty()
    } else {
        let rest = stage_attempts(packets.drop_last(), secrets, protected_stage);
        match stage_attempt(packets.last(), packets.len() - 1, secrets, protected_stage) {
            Some(a) => rest.push(a),
            None => rest,
        }
    }
}

/// The strategies in priority order: unprotected local keys, then
/// passphrase-protected local keys, then the message password.
pub open spec fn decryption_plan(
    packets: Seq<SessionKeyPacket>,
    secrets: Seq<SecretKeyEntry>,
    password_packets: nat,
) -> Seq<Attempt> {
    stage_attempts(packets, secrets, false) + stage_attempts(packets, secrets, true) + if password_packets > 0 {
        seq![Attempt::Password]
    } else {
        Seq::empty()
    }
}

/// The index of the secret with key ID `id`, if any.
fn find_secret(secrets: &Vec<SecretKeyEntry>, id: &[u8]) -> (r: Option<usize>)
    ensures
        r == (match first_index_of(secret_ids(secrets@), id@) {
            Some(i) => Some(i as usize),
            None => None::<usize>,
        }),
        r matches Some(j) ==> j < secrets@.len(),
{
    let ghost ids = secret_ids(secrets@);
    proof {
        lemma_first_index_of(ids, id@);
    }
    let mut i: usize = 0;
    while i < secrets.len()
        invariant
            ids == secret_ids(secrets@),
            i <= secrets@.len(),
            first_index_of(ids.subrange(0, i as int), id@) is None,
        decreases secrets@.len() - i,
    {
        assert(ids.subrange(0, i + 1).drop_last() =~= ids.subrange(0, i as int));
        if bytes_eq(secrets[i].key_id.as_slice(), id) {
            proof {
                lemma_prefix_first(ids, id@, i as int);
            }
            return Some(i);
        }
        i = i + 1;
    }
    assert(ids.subrange(0, i as int) =~= ids);
    None
}

/// Appends the attempts of one stage to `plan`.
fn push_stage(
    plan: &mut Vec<Attempt>,
    packets: &Vec<SessionKeyPacket>,
    secrets: &Vec<SecretKeyEntry>,
    protected_stage: bool,
)
    ensures
        final(plan)@ == old(plan)@ + stage_attempts(packets@, secrets@, protected_stage),
{
    let ghost start = plan@;
    let mut i: usize = 0;
    while i < packets.len()
        invariant
            i <= packets@.len(),
            plan@ == start + stage_attempts(packets@.subrange(0, i as int), secrets@, protected_stage),
        decreases packets@.len() - i,
    {
        let ghost pre = packets@.subrange(0, i as int);
        assert(packets@.subrange(0, i + 1).drop_last() =~= pre);
        assert(packets@.subrange(0, i + 1).last() == packets@[i as int]);
        let p = &packets[i];
        let found = find_secret(secrets, p.recipient.as_slice());
        let ghost a = stage_attempt(packets@[i as int], i as int, secrets@, protected_stage);
        let ghost rest = stage_attempts(pre, secrets@, protected_stage);
        proof {
            lemma_first_index_of(secret_ids(secrets@), packets@[i as int].recipient@);
            assert(secret_ids(secrets@).len() == secrets.len());
        }
        assert(stage_attempts(packets@.subrange(0, i + 1), secrets@, protected_stage) == match a {
            Some(x) => rest.push(x),
            None => rest,
        });
        match found {
            Some(j) => {
                if !protected_stage && !secrets[j].protected {
                    assert(a == Some(Attempt::Unprotected { packet: i, secret: j }));
                    plan.push(Attempt::Unprotected { packet: i, secret: j });
                } else if protected_stage && secrets[j].protected && p.algorithm_supported {
                    assert(a == Some(Attempt::Unlock { packet: i, secret: j }));
                    plan.push(Attempt::Unlock { packet: i, secret: j });
                } else {
                    assert(a is None);
                }
            },
            None => {
                assert(a is None);
            },
        }
        i = i + 1;
    }
    assert(packets@.subrange(0, i as int) =~= packets@);
}

/// Orders the ways of opening a message. First each session-key packet whose
/// recipient is a local key that needs no passphrase; then each packet of a
/// supported algorithm whose recipient is a passphrase-protected local key;
/// last, when the message holds password-derived packets, the message
/// password. Fails with `NoDecryptionKey` when nothing applies.
pub fn plan_decryption(
    packets: &Vec<SessionKeyPacket>,
    secrets: &Vec<SecretKeyEntry>,
    password_packets: usize,
) -> (r: Result<Vec<Attempt>, EngineError>)
    ensures
        ({
            let plan = decryption_plan(packets@, secrets@, password_packets as nat);
            match r {
                Ok(v) => v@ == plan && plan.len() > 0,
                Err(e) => e == EngineError::NoDecryptionKey && plan.len() == 0,
            }
        }),
{
    let mut plan: Vec<Attempt> = Vec::new();
    push_stage(&mut plan, packets, secrets, false);
    push_stage(&mut plan, packets, secrets, true);
    if password_packets > 0 {
        plan.push(Attempt::Password);
    }
    assert(plan@ =~= decryption_plan(packets@, secrets@, password_packets as nat));
    if plan.len() == 0 {
        Err(EngineError::NoDecryptionKey)
    } else {
        Ok(plan)
    }
}

/// With no local key among a message's recipients and no password-derived
/// packet, nothing can open the message: the plan is empty, which
/// `plan_decryption` reports as `NoDecryptionKey`.
pub proof fn lemma_unrelated_keys_cannot_decrypt(
    packets: Seq<SessionKeyPacket>,
    secrets: Seq<SecretKeyEntry>,
)
    requires
        forall|i: int, j: int|
            0 <= i < packets.len() && 0 <= j < secrets.len() ==> #[trigger] packets[i].recipient@
                != #[trigger] secrets[j].key_id@,
    ensures
        decryption_plan(packets, secrets, 0).len() == 0,
{
    lemma_no_stage_attempts(packets, secrets, false);
    lemma_no_stage_attempts(packets, secrets, true);
}

proof fn lemma_no_stage_attempts(
    packets: Seq<SessionKeyPacket>,
    secrets: Seq<SecretKeyEntry>,
    protected_stage: bool,
)
    requires
        forall|i: int, j: int|
            0 <= i < packets.len() && 0 <= j < secrets.len() ==> #[trigger] packets[i].recipient@
                != #[trigger] secrets[j].key_id@,
    ensures
        stage_attempts(packets, secrets, protected_stage).len() == 0,
    decreases packets.len(),
{
    if packets.len() > 0 {
        let rest = packets.drop_last();
        assert forall|i: int, j: int|
            0 <= i < rest.len() && 0 <= j < secrets.len() implies #[trigger] rest[i].recipient@
                != #[trigger] secrets[j].key_id@ by {
            assert(rest[i] == packets[i]);
        }
        lemma_no_stage_attempts(rest, secrets, protected_stage);
        let last = packets.last();
        lemma_first_index_of(secret_ids(secrets), last.recipient@);
        if first_index_of(secret_ids(secrets), last.recipient@) is Some {
            let j = first_index_of(secret_ids(secrets), last.recipient@)->Some_0;
            assert(secret_ids(secrets)[j] == secrets[j].key_id@);
            assert(packets[packets.len() - 1].recipient@ != secrets[j].key_id@);
        }
    }
}

} // verus!
