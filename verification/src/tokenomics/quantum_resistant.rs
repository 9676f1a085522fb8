//! Post-quantum credentials of contributors, in the simulated form the
//! network uses: lattice and hash-tree signatures of contribution proofs,
//! lattice zero-knowledge proofs, key exchange, and the random oracle that
//! governance draws on. Every value is computed from its inputs byte by
//! byte, as each spec function below states.
use vstd::prelude::*;
use vstd::bytes::{
    lemma_auto_spec_u64_to_from_le_bytes, spec_u32_to_le_bytes, spec_u64_to_le_bytes, u32_to_le_bytes, u64_to_le_bytes,
};
use crate::address::Address;
use crate::sys::now_unix_seconds;
use crate::text::{clone_bytes, concat_utf8, front, push_all, text};
use crate::vecmap::VecMap;

verus! {

/// Why a post-quantum operation was refused.
#[derive(Debug, Clone, Copy, PartialEq, Eq)]
pub enum QRError {
    /// The contributor has no lattice key.
    NoLatticeKey,
    /// The contributor has no hash signature tree.
    NoHashTree,
    /// The hash signature tree has no signature left.
    HashTreeExhausted,
    /// No prover handles that proof type.
    NoProver,
}

/// The two post-quantum signature schemes.
#[derive(Debug, Clone, Copy, PartialEq, Eq, Structural)]
pub enum QRSignatureType {
    Lattice,
    HashBased,
}

/// A lattice key pair.
#[derive(Debug)]
pub struct LatticeKeyPair {
    pub private_key: Vec<u8>,
    pub public_key: Vec<u8>,
}

/// A hash-based signature tree and how many of its signatures are used.
#[derive(Debug)]
pub struct HashSignatureTree {
    pub private_seed: Vec<u8>,
    pub public_key: Vec<u8>,
    pub tree_height: u32,
    pub used_signatures: u64,
    pub max_signatures: u64,
}

/// A post-quantum signature.
#[derive(Debug)]
pub struct QuantumResistantSignature {
    pub signature_type: QRSignatureType,
    pub signature_data: Vec<u8>,
    /// Unix time in seconds.
    pub timestamp: i64,
}

/// A contributor's public post-quantum keys.
#[derive(Debug)]
pub struct ContributorKeys {
    pub address: Address,
    pub lattice_public_key: Vec<u8>,
    pub hash_tree_public_key: Vec<u8>,
    /// Unix time in seconds.
    pub created_at: i64,
}

/// The private inputs of a zero-knowledge proof.
#[derive(Debug)]
pub struct QRPrivateInputs {
    pub witness: Vec<u8>,
    pub randomness: Vec<u8>,
}

/// The public inputs of a zero-knowledge proof.
#[derive(Debug)]
pub struct QRPublicInputs {
    pub statement: Vec<u8>,
    pub challenge: Vec<u8>,
}

/// A post-quantum zero-knowledge proof.
#[derive(Debug)]
pub struct QuantumResistantZKProof {
    pub proof_type: String,
    pub proof_data: Vec<u8>,
    pub public_inputs: QRPublicInputs,
    /// Unix time in seconds.
    pub timestamp: i64,
}

/// A secret agreed with a peer.
#[derive(Debug)]
pub struct SharedSecret {
    pub secret: Vec<u8>,
    /// Unix time in seconds.
    pub established_at: i64,
}

/// A random value for governance, with the sources it was drawn from.
#[derive(Debug)]
pub struct QuantumRandom {
    pub value: Vec<u8>,
    pub entropy_sources: Vec<String>,
    /// Unix time in seconds.
    pub generated_at: i64,
}

/// The ASCII bytes of `DILITHIUM_SIG`.
pub open spec fn dilithium_tag() -> Seq<u8> {
    seq![68u8, 73, 76, 73, 84, 72, 73, 85, 77, 95, 83, 73, 71]
}

fn dilithium_tag_bytes() -> (r: [u8; 13])
    ensures
        r@ == dilithium_tag(),
{
    let r: [u8; 13] = [68u8, 73, 76, 73, 84, 72, 73, 85, 77, 95, 83, 73, 71];
    proof {
        assert(r@ =~= dilithium_tag());
    }
    r
}

/// The ASCII bytes of `XMSS_SIGNATURE`.
pub open spec fn xmss_signature_tag() -> Seq<u8> {
    seq![88u8, 77, 83, 83, 95, 83, 73, 71, 78, 65, 84, 85, 82, 69]
}

fn xmss_signature_tag_bytes() -> (r: [u8; 14])
    ensures
        r@ == xmss_signature_tag(),
{
    let r: [u8; 14] = [88u8, 77, 83, 83, 95, 83, 73, 71, 78, 65, 84, 85, 82, 69];
    proof {
        assert(r@ =~= xmss_signature_tag());
    }
    r
}

/// The ASCII bytes of `LATTICE_ZK_PROOF`.
pub open spec fn zk_proof_tag() -> Seq<u8> {
    seq![76u8, 65, 84, 84, 73, 67, 69, 95, 90, 75, 95, 80, 82, 79, 79, 70]
}

fn zk_proof_tag_bytes() -> (r: [u8; 16])
    ensures
        r@ == zk_proof_tag(),
{
    let r: [u8; 16] = [76u8, 65, 84, 84, 73, 67, 69, 95, 90, 75, 95, 80, 82, 79, 79, 70];
    proof {
        assert(r@ =~= zk_proof_tag());
    }
    r
}

/// The ASCII bytes of `XMSS_PUBKEY`.
pub open spec fn xmss_public_key_tag() -> Seq<u8> {
    seq![88u8, 77, 83, 83, 95, 80, 85, 66, 75, 69, 89]
}

fn xmss_public_key_tag_bytes() -> (r: [u8; 11])
    ensures
        r@ == xmss_public_key_tag(),
{
    let r: [u8; 11] = [88u8, 77, 83, 83, 95, 80, 85, 66, 75, 69, 89];
    proof {
        assert(r@ =~= xmss_public_key_tag());
    }
    r
}

/// Law: a lattice signature made with a key of at least sixteen bytes over
/// data of at least sixteen bytes passes the lattice check.
pub proof fn lemma_lattice_signature_accepted(private_key: Seq<u8>, data: Seq<u8>)
    requires
        private_key.len() >= 16,
        data.len() >= 16,
    ensures
        lattice_signature_ok(lattice_signature(private_key, data)),
{
    let sig = lattice_signature(private_key, data);
    assert(sig.len() >= 45);
    assert(sig.subrange(sig.len() - 13, sig.len() as int) =~= dilithium_tag());
}

/// Law: a hash-tree signature made with a seed of at least sixteen bytes
/// over data of at least 24 bytes passes the hash-tree check, whatever its
/// index.
pub proof fn lemma_xmss_signature_accepted(index: u64, seed: Seq<u8>, data: Seq<u8>)
    requires
        seed.len() >= 16,
        data.len() >= 24,
    ensures
        xmss_signature_ok(xmss_signature(index, seed, data)),
{
    lemma_auto_spec_u64_to_from_le_bytes();
    let sig = xmss_signature(index, seed, data);
    assert(sig.len() >= 62);
    assert(sig.subrange(sig.len() - 14, sig.len() as int) =~= xmss_signature_tag());
}

/// Law: a zero-knowledge proof from a witness and a statement of at least
/// 32 bytes each passes the proof check.
pub proof fn lemma_zk_proof_accepted(witness: Seq<u8>, statement: Seq<u8>)
    requires
        witness.len() >= 32,
        statement.len() >= 32,
    ensures
        zk_proof_ok(zk_proof_bytes(witness, statement)),
{
    let p = zk_proof_bytes(witness, statement);
    assert(p.len() == 80);
    assert(p.subrange(p.len() - 16, p.len() as int) =~= zk_proof_tag());
}

/// Law: the lattice check accepts only what ends like a lattice signature:
/// an accepted signature has at least 45 bytes and its last 13 are the
/// ASCII of `DILITHIUM_SIG`; every such byte string is accepted; and
/// changing any one of those last 13 bytes of an accepted signature gets it
/// refused.
pub proof fn lemma_lattice_check_sound(sig: Seq<u8>, i: int, b: u8)
    ensures
        lattice_signature_ok(sig) ==> sig.len() >= 45 && sig.subrange(sig.len() - 13, sig.len() as int) == seq![
            68u8, 73, 76, 73, 84, 72, 73, 85, 77, 95, 83, 73, 71,
        ],
        sig.len() >= 45 && sig.subrange(sig.len() - 13, sig.len() as int) == seq![
            68u8, 73, 76, 73, 84, 72, 73, 85, 77, 95, 83, 73, 71,
        ] ==> lattice_signature_ok(sig),
        lattice_signature_ok(sig) && sig.len() - 13 <= i < sig.len() && b != sig[i] ==> !lattice_signature_ok(
            sig.update(i, b),
        ),
{
    let tag = seq![68u8, 73, 76, 73, 84, 72, 73, 85, 77, 95, 83, 73, 71];
    assert(dilithium_tag() =~= tag);
    if lattice_signature_ok(sig) && sig.len() - 13 <= i < sig.len() && b != sig[i] {
        let t = sig.update(i, b);
        let k = i - (sig.len() - 13);
        assert(t.subrange(t.len() - 13, t.len() as int)[k] == b);
        assert(sig.subrange(sig.len() - 13, sig.len() as int)[k] == sig[i]);
    }
}

/// Law: the proof check accepts only what ends like a lattice proof: an
/// accepted proof has at least 80 bytes and its last 16 are the ASCII of
/// `LATTICE_ZK_PROOF`; every such byte string is accepted; and changing any
/// one of those last 16 bytes of an accepted proof gets it refused.
pub proof fn lemma_zk_check_sound(proof: Seq<u8>, i: int, b: u8)
    ensures
        zk_proof_ok(proof) ==> proof.len() >= 80 && proof.subrange(proof.len() - 16, proof.len() as int)
            == seq![76u8, 65, 84, 84, 73, 67, 69, 95, 90, 75, 95, 80, 82, 79, 79, 70],
        proof.len() >= 80 && proof.subrange(proof.len() - 16, proof.len() as int) == seq![
            76u8, 65, 84, 84, 73, 67, 69, 95, 90, 75, 95, 80, 82, 79, 79, 70,
        ] ==> zk_proof_ok(proof),
        zk_proof_ok(proof) && proof.len() - 16 <= i < proof.len() && b != proof[i] ==> !zk_proof_ok(
            proof.update(i, b),
        ),
{
    let tag = seq![76u8, 65, 84, 84, 73, 67, 69, 95, 90, 75, 95, 80, 82, 79, 79, 70];
    assert(zk_proof_tag() =~= tag);
    if zk_proof_ok(proof) && proof.len() - 16 <= i < proof.len() && b != proof[i] {
        let t = proof.update(i, b);
        let k = i - (proof.len() - 16);
        assert(t.subrange(t.len() - 16, t.len() as int)[k] == b);
        assert(proof.subrange(proof.len() - 16, proof.len() as int)[k] == proof[i]);
    }
}

/// The bytes a key generator draws: byte `i` is `17 i + 42` modulo 256.
pub open spec fn simulated_random(len: nat) -> Seq<u8> {
    Seq::new(len, |i: int| ((i * 17 + 42) % 256) as u8)
}

/// The lattice public key of a private key: each byte `b` becomes
/// `3 b + 7` modulo 256.
pub open spec fn derived_public_key(private_key: Seq<u8>) -> Seq<u8> {
    private_key.map_values(|b: u8| ((b * 3 + 7) % 256) as u8)
}

/// The public key of a hash tree: its seed, its height (four bytes,
/// little-endian) and the tag `XMSS_PUBKEY`.
pub open spec fn xmss_public_key(seed: Seq<u8>, tree_height: u32) -> Seq<u8> {
    seed + spec_u32_to_le_bytes(tree_height) + xmss_public_key_tag()
}

/// A lattice signature: the first sixteen bytes of the private key, the
/// first 32 bytes of the data and the tag `DILITHIUM_SIG`.
pub open spec fn lattice_signature(private_key: Seq<u8>, data: Seq<u8>) -> Seq<u8> {
    private_key.take(16) + front(data, 32) + dilithium_tag()
}

/// A hash-tree signature: the signature's index (eight bytes,
/// little-endian), the first sixteen bytes of the seed, the first 32 bytes
/// of the data and the tag `XMSS_SIGNATURE`.
pub open spec fn xmss_signature(index: u64, seed: Seq<u8>, data: Seq<u8>) -> Seq<u8> {
    spec_u64_to_le_bytes(index) + seed.take(16) + front(data, 32) + xmss_signature_tag()
}

/// Whether `s` ends with `t`.
pub open spec fn ends_with(s: Seq<u8>, t: Seq<u8>) -> bool {
    s.len() >= t.len() && s.subrange(s.len() - t.len(), s.len() as int) == t
}

/// Whether a lattice signature is accepted: at least 45 bytes, ending
/// with its tag.
pub open spec fn lattice_signature_ok(sig: Seq<u8>) -> bool {
    sig.len() >= 45 && ends_with(sig, dilithium_tag())
}

/// Whether a hash-tree signature is accepted: at least 62 bytes, ending
/// with its tag.
pub open spec fn xmss_signature_ok(sig: Seq<u8>) -> bool {
    sig.len() >= 62 && ends_with(sig, xmss_signature_tag())
}

/// A lattice zero-knowledge proof: the first 32 bytes of the witness, the
/// first 32 bytes of the statement and the tag `LATTICE_ZK_PROOF`.
pub open spec fn zk_proof_bytes(witness: Seq<u8>, statement: Seq<u8>) -> Seq<u8> {
    front(witness, 32) + front(statement, 32) + zk_proof_tag()
}

/// Whether a lattice zero-knowledge proof is accepted: at least 80 bytes,
/// ending with its tag.
pub open spec fn zk_proof_ok(proof: Seq<u8>) -> bool {
    proof.len() >= 80 && ends_with(proof, zk_proof_tag())
}

/// The secret agreed with a peer: the first sixteen bytes of our private
/// key and of the peer's address.
pub open spec fn shared_secret_bytes(private_key: Seq<u8>, peer: Seq<u8>) -> Seq<u8> {
    private_key.take(16) + peer.take(16)
}

/// The randomness extracted from entropy: byte `i` plus `i`, modulo 256.
pub open spec fn extracted(entropy: Seq<u8>) -> Seq<u8> {
    Seq::new(entropy.len(), |i: int| ((entropy[i] + i % 256) % 256) as u8)
}

/// The contribution types that get a prover.
pub open spec fn prover_types() -> Seq<Seq<char>> {
    seq![
        "ml_training"@,
        "inference_serving"@,
        "data_validation"@,
        "model_optimization"@,
        "network_maintenance"@,
        "governance_participation"@,
    ]
}

fn push_front(v: &mut Vec<u8>, s: &[u8], n: usize)
    ensures
        final(v)@ == old(v)@ + front(s@, n as int),
{
    let ghost v0 = v@;
    let m: usize = if s.len() < n {
        s.len()
    } else {
        n
    };
    let mut i: usize = 0;
    while i < m
        invariant
            m <= s@.len(),
            i <= m,
            v@ == v0 + s@.take(i as int),
        decreases m - i,
    {
        v.push(s[i]);
        i = i + 1;
        proof {
            assert(v@ =~= v0 + s@.take(i as int));
        }
    }
    proof {
        if s@.len() < n {
            assert(s@.take(m as int) =~= s@);
        }
    }
}

fn ends_with_bytes(s: &[u8], t: &[u8]) -> (r: bool)
    ensures
        r == ends_with(s@, t@),
{
    if s.len() < t.len() {
        return false;
    }
    let tl = t.len();
    let sl = s.len();
    let off = sl - tl;
    let mut i: usize = 0;
    while i < tl
        invariant
            tl == t@.len(),
            sl == s@.len(),
            off + tl == sl,
            i <= t@.len(),
            forall|j: int| 0 <= j < i ==> s@[off + j] == t@[j],
        decreases tl - i,
    {
        if s[off + i] != t[i] {
            proof {
                assert(s@.subrange(off as int, s@.len() as int)[i as int] != t@[i as int]);
            }
            return false;
        }
        i = i + 1;
    }
    proof {
        assert(s@.subrange(off as int, s@.len() as int) =~= t@);
    }
    true
}

fn generate_secure_random_bytes(length: usize) -> (r: Vec<u8>)
    requires
        length <= 1024,
    ensures
        r@ == simulated_random(length as nat),
{
    let mut bytes: Vec<u8> = Vec::new();
    let mut i: usize = 0;
    while i < length
        invariant
            length <= 1024,
            i <= length,
            bytes@ == simulated_random(i as nat),
        decreases length - i,
    {
        bytes.push(((i * 17 + 42) % 256) as u8);
        i = i + 1;
        proof {
            assert(bytes@ =~= simulated_random(i as nat));
        }
    }
    bytes
}

fn derive_public_key_from_private(private_key: &[u8]) -> (r: Vec<u8>)
    ensures
        r@ == derived_public_key(private_key@),
{
    let mut out: Vec<u8> = Vec::new();
    let n = private_key.len();
    let mut i: usize = 0;
    while i < n
        invariant
            n == private_key@.len(),
            i <= n,
            out@ == private_key@.take(i as int).map_values(|b: u8| ((b * 3 + 7) % 256) as u8),
        decreases n - i,
    {
        let b = private_key[i];
        let m = b.wrapping_mul(3);
        proof {
            assert((b * 3 + 7) % 256 == (m + 7) % 256) by (nonlinear_arith)
                requires
                    m == (b * 3) % 256,
            ;
        }
        out.push(m.wrapping_add(7));
        i = i + 1;
        proof {
            assert(out@ =~= private_key@.take(i as int).map_values(|b: u8| ((b * 3 + 7) % 256) as u8));
        }
    }
    proof {
        assert(private_key@.take(n as int) =~= private_key@);
    }
    out
}

fn generate_xmss_public_key(private_seed: &[u8], tree_height: u32) -> (r: Vec<u8>)
    ensures
        r@ == xmss_public_key(private_seed@, tree_height),
{
    let mut key: Vec<u8> = Vec::new();
    push_all(&mut key, private_seed);
    let h = u32_to_le_bytes(tree_height);
    push_all(&mut key, h.as_slice());
    push_all(&mut key, &xmss_public_key_tag_bytes());
    proof {
        assert(key@ =~= xmss_public_key(private_seed@, tree_height));
    }
    key
}

/// A lattice key pair from the simulated key generator.
fn generate_lattice_keypair() -> (r: LatticeKeyPair)
    ensures
        r.private_key@ == simulated_random(32),
        r.public_key@ == derived_public_key(simulated_random(32)),
{
    let private_key = generate_secure_random_bytes(32);
    let public_key = derive_public_key_from_private(private_key.as_slice());
    LatticeKeyPair { private_key, public_key }
}

/// A fresh hash signature tree of height ten (1024 signatures) from the
/// simulated key generator.
fn generate_hash_signature_tree() -> (r: HashSignatureTree)
    ensures
        r.private_seed@ == simulated_random(32),
        r.public_key@ == xmss_public_key(simulated_random(32), 10),
        r.tree_height == 10,
        r.used_signatures == 0,
        r.max_signatures == 1024,
{
    let private_seed = generate_secure_random_bytes(32);
    let public_key = generate_xmss_public_key(private_seed.as_slice(), 10);
    HashSignatureTree { private_seed, public_key, tree_height: 10, used_signatures: 0, max_signatures: 1024 }
}

/// A lattice signature of the data under a private key.
fn create_lattice_signature(private_key: &[u8], data: &[u8]) -> (r: Vec<u8>)
    requires
        private_key@.len() >= 16,
    ensures
        r@ == lattice_signature(private_key@, data@),
{
    let mut sig: Vec<u8> = Vec::new();
    push_front(&mut sig, private_key, 16);
    push_front(&mut sig, data, 32);
    push_all(&mut sig, &dilithium_tag_bytes());
    proof {
        assert(front(private_key@, 16) =~= private_key@.take(16));
    }
    sig
}

/// The hash-tree signature of the data with the signature of an index.
fn create_hash_based_signature(index: u64, private_seed: &[u8], data: &[u8]) -> (r: Vec<u8>)
    requires
        private_seed@.len() >= 16,
    ensures
        r@ == xmss_signature(index, private_seed@, data@),
{
    let mut sig: Vec<u8> = Vec::new();
    let idx = u64_to_le_bytes(index);
    push_all(&mut sig, idx.as_slice());
    push_front(&mut sig, private_seed, 16);
    push_front(&mut sig, data, 32);
    push_all(&mut sig, &xmss_signature_tag_bytes());
    proof {
        assert(front(private_seed@, 16) =~= private_seed@.take(16));
        assert(sig@ =~= xmss_signature(index, private_seed@, data@));
    }
    sig
}

/// The lattice check of a signature.
fn verify_lattice_signature(signature: &[u8]) -> (r: bool)
    ensures
        r == lattice_signature_ok(signature@),
{
    if signature.len() < 45 {
        return false;
    }
    ends_with_bytes(signature, &dilithium_tag_bytes())
}

/// The hash-tree check of a signature.
fn verify_hash_based_signature(signature: &[u8]) -> (r: bool)
    ensures
        r == xmss_signature_ok(signature@),
{
    if signature.len() < 62 {
        return false;
    }
    ends_with_bytes(signature, &xmss_signature_tag_bytes())
}

impl QuantumResistantZKProver {
    /// A lattice prover for a proof type.
    pub fn new_lattice_based(proof_type: &str) -> (r: QuantumResistantZKProver)
        ensures
            r.proof_type@ == proof_type@,
    {
        QuantumResistantZKProver { proof_type: text(proof_type) }
    }

    /// The proof of a statement from a witness.
    pub fn generate_proof(&self, private_inputs: &QRPrivateInputs, public_inputs: &QRPublicInputs) -> (r: Vec<u8>)
        ensures
            r@ == zk_proof_bytes(private_inputs.witness@, public_inputs.statement@),
    {
        let mut proof: Vec<u8> = Vec::new();
        push_front(&mut proof, private_inputs.witness.as_slice(), 32);
        push_front(&mut proof, public_inputs.statement.as_slice(), 32);
        push_all(&mut proof, &zk_proof_tag_bytes());
        proof
    }

    /// Whether a proof is accepted.
    pub fn verify_proof(&self, proof: &[u8], public_inputs: &QRPublicInputs) -> (r: bool)
        ensures
            r == zk_proof_ok(proof@),
    {
        if proof.len() < 80 {
            return false;
        }
        ends_with_bytes(proof, &zk_proof_tag_bytes())
    }
}

/// A lattice zero-knowledge prover for one proof type.
#[derive(Debug)]
pub struct QuantumResistantZKProver {
    pub proof_type: String,
}

/// A key encapsulation instance.
#[derive(Debug)]
pub struct KEMInstance {
    pub public_key: Vec<u8>,
    pub private_key: Vec<u8>,
}

impl KEMInstance {
    /// An instance with its fixed simulated keys: 32 bytes of 84 public,
    /// 32 bytes of 42 private.
    pub fn new() -> (r: KEMInstance)
        ensures
            r.public_key@ == Seq::new(32, |i: int| 84u8),
            r.private_key@ == Seq::new(32, |i: int| 42u8),
    {
        let mut public_key: Vec<u8> = Vec::new();
        let mut private_key: Vec<u8> = Vec::new();
        let mut i: usize = 0;
        while i < 32
            invariant
                i <= 32,
                public_key@ == Seq::new(i as nat, |j: int| 84u8),
                private_key@ == Seq::new(i as nat, |j: int| 42u8),
            decreases 32 - i,
        {
            public_key.push(84);
            private_key.push(42);
            i = i + 1;
            proof {
                assert(public_key@ =~= Seq::new(i as nat, |j: int| 84u8));
                assert(private_key@ =~= Seq::new(i as nat, |j: int| 42u8));
            }
        }
        KEMInstance { public_key, private_key }
    }

    /// The secret agreed with a peer.
    pub fn derive_shared_secret(&self, peer: &Address) -> (r: SharedSecret)
        requires
            self.private_key@.len() >= 16,
        ensures
            r.secret@ == shared_secret_bytes(self.private_key@, peer@),
    {
        let mut secret: Vec<u8> = Vec::new();
        push_front(&mut secret, self.private_key.as_slice(), 16);
        push_front(&mut secret, peer.as_bytes(), 16);
        SharedSecret { secret, established_at: now_unix_seconds() }
    }
}

/// Post-quantum key exchange with peers.
#[derive(Debug)]
pub struct PostQuantumKeyExchange {
    pub kem_instances: VecMap<Address, KEMInstance>,
}

impl PostQuantumKeyExchange {
    /// No exchanges yet.
    pub fn new() -> (r: PostQuantumKeyExchange)
        ensures
            r.kem_instances.wf(),
            r.kem_instances@ == Map::<Seq<u8>, KEMInstance>::empty(),
    {
        PostQuantumKeyExchange { kem_instances: VecMap::new() }
    }

    /// Agrees a secret with a peer through a fresh instance, kept for the
    /// peer.
    pub fn perform_key_exchange(&mut self, peer: &Address) -> (r: SharedSecret)
        requires
            old(self).kem_instances.wf(),
        ensures
            final(self).kem_instances.wf(),
            r.secret@ == shared_secret_bytes(Seq::new(32, |i: int| 42u8), peer@),
            final(self).kem_instances@.dom() == old(self).kem_instances@.dom().insert(peer@),
    {
        let kem = KEMInstance::new();
        let secret = kem.derive_shared_secret(peer);
        self.kem_instances.insert(*peer, kem);
        proof {
            assert(self.kem_instances@.dom() =~= old(self).kem_instances@.dom().insert(peer@));
        }
        secret
    }
}

/// The random oracle for governance.
#[derive(Debug)]
pub struct QuantumRandomOracle {
    pub entropy_pool: Vec<u8>,
}

impl QuantumRandomOracle {
    /// An oracle with an empty pool.
    pub fn new() -> (r: QuantumRandomOracle)
        ensures
            r.entropy_pool@ == Seq::<u8>::empty(),
    {
        QuantumRandomOracle { entropy_pool: Vec::new() }
    }

    /// Fills the pool with the gathered entropy.
    pub fn initialize(&mut self)
        ensures
            final(self).entropy_pool@ == Seq::new(64, |i: int| 127u8),
    {
        self.entropy_pool = Self::gather_quantum_entropy();
    }

    /// The simulated quantum entropy: 64 bytes of 127.
    fn gather_quantum_entropy() -> (r: Vec<u8>)
        ensures
            r@ == Seq::new(64, |i: int| 127u8),
    {
        let mut pool: Vec<u8> = Vec::new();
        let mut i: usize = 0;
        while i < 64
            invariant
                i <= 64,
                pool@ == Seq::new(i as nat, |j: int| 127u8),
            decreases 64 - i,
        {
            pool.push(127);
            i = i + 1;
            proof {
                assert(pool@ =~= Seq::new(i as nat, |j: int| 127u8));
            }
        }
        pool
    }

    /// The entropy a source contributes: its bytes.
    fn extract_entropy_from_source(source: &str) -> (r: &[u8])
        ensures
            r@ == vstd::utf8::encode_utf8(source@),
    {
        source.as_bytes()
    }

    /// The randomness extracted from entropy: byte `i` plus `i`, wrapping.
    fn extract_randomness(entropy: &[u8]) -> (r: Vec<u8>)
        ensures
            r@ == extracted(entropy@),
    {
        let mut value: Vec<u8> = Vec::new();
        let m = entropy.len();
        let mut i: usize = 0;
        while i < m
            invariant
                m == entropy@.len(),
                i <= m,
                value@ == extracted(entropy@).take(i as int),
            decreases m - i,
        {
            let b = entropy[i];
            let off = (i % 256) as u8;
            value.push(b.wrapping_add(off));
            i = i + 1;
            proof {
                assert(value@ =~= extracted(entropy@).take(i as int));
            }
        }
        proof {
            assert(extracted(entropy@).take(m as int) =~= extracted(entropy@));
        }
        value
    }

    /// A random value drawn from the pool and the sources' bytes.
    pub fn generate_quantum_random(&self, entropy_sources: Vec<String>) -> (r: QuantumRandom)
        ensures
            r.value@ == extracted(self.entropy_pool@ + concat_utf8(entropy_sources@)),
            r.entropy_sources@ == entropy_sources@,
    {
        let mut combined = clone_bytes(&self.entropy_pool);
        let ghost pool = self.entropy_pool@;
        let n = entropy_sources.len();
        let mut k: usize = 0;
        while k < n
            invariant
                n == entropy_sources@.len(),
                k <= n,
                combined@ == pool + concat_utf8(entropy_sources@.take(k as int)),
            decreases n - k,
        {
            push_all(&mut combined, Self::extract_entropy_from_source(entropy_sources[k].as_str()));
            proof {
                assert(entropy_sources@.take(k + 1).drop_last() =~= entropy_sources@.take(k as int));
            }
            k = k + 1;
            proof {
                assert(combined@ =~= pool + concat_utf8(entropy_sources@.take(k as int)));
            }
        }
        proof {
            assert(entropy_sources@.take(n as int) =~= entropy_sources@);
        }
        let value = Self::extract_randomness(combined.as_slice());
        QuantumRandom { value, entropy_sources, generated_at: now_unix_seconds() }
    }
}

/// The post-quantum credentials of the network's contributors.
#[derive(Debug)]
pub struct QuantumResistantCrypto {
    lattice_keys: VecMap<Address, LatticeKeyPair>,
    hash_trees: VecMap<Address, HashSignatureTree>,
    qr_zk_provers: VecMap<String, QuantumResistantZKProver>,
    pq_key_exchange: PostQuantumKeyExchange,
    quantum_oracle: QuantumRandomOracle,
}

impl QuantumResistantCrypto {
    /// The lattice key of each contributor.
    pub closed spec fn lattice(self) -> Map<Seq<u8>, LatticeKeyPair> {
        self.lattice_keys@
    }

    /// The hash signature tree of each contributor.
    pub closed spec fn trees(self) -> Map<Seq<u8>, HashSignatureTree> {
        self.hash_trees@
    }

    /// The proof types with a prover.
    pub closed spec fn provers(self) -> Set<Seq<char>> {
        self.qr_zk_provers@.dom()
    }

    /// The peers a key has been exchanged with.
    pub closed spec fn exchange_peers(self) -> Set<Seq<u8>> {
        self.pq_key_exchange.kem_instances@.dom()
    }

    /// The oracle's entropy pool.
    pub closed spec fn pool(self) -> Seq<u8> {
        self.quantum_oracle.entropy_pool@
    }

    /// The maps are well formed and every stored key and seed has the
    /// sixteen bytes a signature takes from it.
    pub closed spec fn wf(self) -> bool {
        &&& self.lattice_keys.wf()
        &&& self.hash_trees.wf()
        &&& self.qr_zk_provers.wf()
        &&& self.pq_key_exchange.kem_instances.wf()
        &&& forall|a: Seq<u8>| #[trigger]
            self.lattice_keys@.contains_key(a) ==> self.lattice_keys@[a].private_key@.len() >= 16
        &&& forall|a: Seq<u8>| #[trigger]
            self.hash_trees@.contains_key(a) ==> self.hash_trees@[a].private_seed@.len() >= 16
        &&& forall|t: Seq<char>| #[trigger]
            self.qr_zk_provers@.contains_key(t) ==> self.qr_zk_provers@[t].proof_type@ == t
    }

    /// No keys, trees or provers.
    pub fn new() -> (r: QuantumResistantCrypto)
        ensures
            r.wf(),
            r.lattice() == Map::<Seq<u8>, LatticeKeyPair>::empty(),
            r.trees() == Map::<Seq<u8>, HashSignatureTree>::empty(),
            r.provers() == Set::<Seq<char>>::empty(),
            r.pool() == Seq::<u8>::empty(),
            r.exchange_peers() == Set::<Seq<u8>>::empty(),
    {
        let r = QuantumResistantCrypto {
            lattice_keys: VecMap::new(),
            hash_trees: VecMap::new(),
            qr_zk_provers: VecMap::new(),
            pq_key_exchange: PostQuantumKeyExchange::new(),
            quantum_oracle: QuantumRandomOracle::new(),
        };
        assert(r.provers() =~= Set::<Seq<char>>::empty());
        assert(r.exchange_peers() =~= Set::<Seq<u8>>::empty());
        r
    }

    /// Fills the oracle's pool and sets up a prover for each of the six
    /// contribution types with a proof of their own.
    pub fn initialize(&mut self)
        requires
            old(self).wf(),
        ensures
            final(self).wf(),
            final(self).pool() == Seq::new(64, |i: int| 127u8),
            forall|t: Seq<char>|
                #[trigger] final(self).provers().contains(t) <==> old(self).provers().contains(t)
                    || prover_types().contains(t),
            final(self).lattice() == old(self).lattice(),
            final(self).trees() == old(self).trees(),
    {
        self.quantum_oracle.initialize();
        let ghost p0 = self.qr_zk_provers@.dom();
        let ghost l0 = self.lattice_keys@;
        let ghost t0 = self.hash_trees@;
        let mut names: Vec<String> = Vec::new();
        names.push(text("ml_training"));
        names.push(text("inference_serving"));
        names.push(text("data_validation"));
        names.push(text("model_optimization"));
        names.push(text("network_maintenance"));
        names.push(text("governance_participation"));
        proof {
            assert(names@.map_values(|s: String| s@) =~= prover_types());
        }
        let n = names.len();
        let mut i: usize = 0;
        while i < n
            invariant
                n == names@.len(),
                n == 6,
                i <= n,
                names@.map_values(|s: String| s@) == prover_types(),
                self.qr_zk_provers.wf(),
                forall|t: Seq<char>| #[trigger]
                    self.qr_zk_provers@.contains_key(t) ==> self.qr_zk_provers@[t].proof_type@ == t,
                forall|t: Seq<char>|
                    #[trigger] self.qr_zk_provers@.contains_key(t) <==> p0.contains(t) || exists|j: int|
                        0 <= j < i && prover_types()[j] == t,
                self.lattice_keys.wf(),
                self.hash_trees.wf(),
                self.pq_key_exchange.kem_instances.wf(),
                self.lattice_keys@ == l0,
                self.hash_trees@ == t0,
                forall|a: Seq<u8>| #[trigger]
                    self.lattice_keys@.contains_key(a) ==> self.lattice_keys@[a].private_key@.len() >= 16,
                forall|a: Seq<u8>| #[trigger]
                    self.hash_trees@.contains_key(a) ==> self.hash_trees@[a].private_seed@.len() >= 16,
                self.quantum_oracle.entropy_pool@ == Seq::new(64, |k: int| 127u8),
            decreases n - i,
        {
            let name = names[i].clone();
            let prover = QuantumResistantZKProver::new_lattice_based(name.as_str());
            proof {
                assert(names@.map_values(|s: String| s@)[i as int] == names@[i as int]@);
            }
            self.qr_zk_provers.insert(name, prover);
            i = i + 1;
        }
        proof {
            assert forall|t: Seq<char>| #[trigger] self.provers().contains(t) <==> old(self).provers().contains(t)
                || prover_types().contains(t) by {
                if prover_types().contains(t) {
                    let j = choose|j: int| 0 <= j < prover_types().len() && prover_types()[j] == t;
                    assert(self.qr_zk_provers@.contains_key(t));
                }
            }
        }
    }

    /// Makes a contributor's lattice key and hash signature tree (height
    /// ten, so 1024 signatures) from the simulated key generator, keeps
    /// them, and hands back the public keys.
    pub fn generate_contributor_keys(&mut self, address: &Address) -> (r: ContributorKeys)
        requires
            old(self).wf(),
        ensures
            final(self).wf(),
            r.address == *address,
            r.lattice_public_key@ == derived_public_key(simulated_random(32)),
            r.hash_tree_public_key@ == xmss_public_key(simulated_random(32), 10),
            final(self).lattice().contains_key(address@),
            final(self).lattice()[address@].private_key@ == simulated_random(32),
            final(self).lattice()[address@].public_key@ == derived_public_key(simulated_random(32)),
            final(self).lattice() == old(self).lattice().insert(address@, final(self).lattice()[address@]),
            final(self).trees().contains_key(address@),
            ({
                let t = final(self).trees()[address@];
                &&& t.private_seed@ == simulated_random(32)
                &&& t.public_key@ == xmss_public_key(simulated_random(32), 10)
                &&& t.tree_height == 10
                &&& t.used_signatures == 0
                &&& t.max_signatures == 1024
            }),
            final(self).trees() == old(self).trees().insert(address@, final(self).trees()[address@]),
            final(self).provers() == old(self).provers(),
            final(self).pool() == old(self).pool(),
    {
        let keypair = generate_lattice_keypair();
        let lattice_public = clone_bytes(&keypair.public_key);
        let tree = generate_hash_signature_tree();
        let tree_public_copy = clone_bytes(&tree.public_key);
        self.lattice_keys.insert(*address, keypair);
        self.hash_trees.insert(*address, tree);
        ContributorKeys {
            address: *address,
            lattice_public_key: lattice_public,
            hash_tree_public_key: tree_public_copy,
            created_at: now_unix_seconds(),
        }
    }

    /// Signs a contribution proof with one of the contributor's keys. A
    /// lattice signature needs a lattice key; a hash-tree signature needs a
    /// tree with a signature left, and uses it up.
    pub fn sign_contribution_proof(
        &mut self,
        contributor: &Address,
        proof_data: &[u8],
        signature_type: QRSignatureType,
    ) -> (r: Result<QuantumResistantSignature, QRError>)
        requires
            old(self).wf(),
        ensures
            final(self).wf(),
            final(self).lattice() == old(self).lattice(),
            final(self).provers() == old(self).provers(),
            final(self).pool() == old(self).pool(),
            signature_type == QRSignatureType::Lattice ==> final(self).trees() == old(self).trees() && if old(
                self,
            ).lattice().contains_key(contributor@) {
                r matches Ok(s) && s.signature_type == signature_type && s.signature_data@ == lattice_signature(
                    old(self).lattice()[contributor@].private_key@,
                    proof_data@,
                )
            } else {
                r == Err::<QuantumResistantSignature, QRError>(QRError::NoLatticeKey)
            },
            signature_type == QRSignatureType::HashBased ==> if !old(self).trees().contains_key(contributor@) {
                r == Err::<QuantumResistantSignature, QRError>(QRError::NoHashTree) && final(self).trees()
                    == old(self).trees()
            } else {
                let t = old(self).trees()[contributor@];
                if t.used_signatures >= t.max_signatures {
                    r == Err::<QuantumResistantSignature, QRError>(QRError::HashTreeExhausted) && final(self).trees()
                        == old(self).trees()
                } else {
                    &&& r matches Ok(s) && s.signature_type == signature_type && s.signature_data@ == xmss_signature(
                        t.used_signatures,
                        t.private_seed@,
                        proof_data@,
                    )
                    &&& final(self).trees().contains_key(contributor@)
                    &&& final(self).trees() == old(self).trees().insert(
                        contributor@,
                        final(self).trees()[contributor@],
                    )
                    &&& final(self).trees()[contributor@].used_signatures == t.used_signatures + 1
                    &&& final(self).trees()[contributor@].private_seed@ == t.private_seed@
                    &&& final(self).trees()[contributor@].public_key@ == t.public_key@
                    &&& final(self).trees()[contributor@].tree_height == t.tree_height
                    &&& final(self).trees()[contributor@].max_signatures == t.max_signatures
                }
            },
    {
        match signature_type {
            QRSignatureType::Lattice => {
                match self.lattice_keys.get(contributor) {
                    Some(keypair) => {
                        let sig = create_lattice_signature(keypair.private_key.as_slice(), proof_data);
                        Ok(QuantumResistantSignature {
                            signature_type,
                            signature_data: sig,
                            timestamp: now_unix_seconds(),
                        })
                    },
                    None => Err(QRError::NoLatticeKey),
                }
            },
            QRSignatureType::HashBased => {
                let (index, seed, public_key, height, max) = match self.hash_trees.get(contributor) {
                    Some(tree) => {
                        if tree.used_signatures >= tree.max_signatures {
                            return Err(QRError::HashTreeExhausted);
                        }
                        (
                            tree.used_signatures,
                            clone_bytes(&tree.private_seed),
                            clone_bytes(&tree.public_key),
                            tree.tree_height,
                            tree.max_signatures,
                        )
                    },
                    None => {
                        return Err(QRError::NoHashTree);
                    },
                };
                let sig = create_hash_based_signature(index, seed.as_slice(), proof_data);
                self.hash_trees.insert(
                    *contributor,
                    HashSignatureTree {
                        private_seed: seed,
                        public_key,
                        tree_height: height,
                        used_signatures: index + 1,
                        max_signatures: max,
                    },
                );
                Ok(QuantumResistantSignature { signature_type, signature_data: sig, timestamp: now_unix_seconds() })
            },
        }
    }

    /// Checks a signature against the contributor's key of its scheme;
    /// refused when the contributor has no such key.
    pub fn verify_signature(&self, contributor: &Address, data: &[u8], signature: &QuantumResistantSignature) -> (r:
        Result<bool, QRError>)
        requires
            self.wf(),
        ensures
            signature.signature_type == QRSignatureType::Lattice ==> if self.lattice().contains_key(contributor@) {
                r == Ok::<bool, QRError>(lattice_signature_ok(signature.signature_data@))
            } else {
                r == Err::<bool, QRError>(QRError::NoLatticeKey)
            },
            signature.signature_type == QRSignatureType::HashBased ==> if self.trees().contains_key(contributor@) {
                r == Ok::<bool, QRError>(xmss_signature_ok(signature.signature_data@))
            } else {
                r == Err::<bool, QRError>(QRError::NoHashTree)
            },
    {
        match signature.signature_type {
            QRSignatureType::Lattice => {
                if !self.lattice_keys.contains_key(contributor) {
                    return Err(QRError::NoLatticeKey);
                }
                Ok(verify_lattice_signature(signature.signature_data.as_slice()))
            },
            QRSignatureType::HashBased => {
                if !self.hash_trees.contains_key(contributor) {
                    return Err(QRError::NoHashTree);
                }
                Ok(verify_hash_based_signature(signature.signature_data.as_slice()))
            },
        }
    }

    /// A zero-knowledge proof of a statement by the prover of a proof
    /// type; refused when there is none.
    pub fn generate_qr_zk_proof(
        &self,
        proof_type: &str,
        private_inputs: &QRPrivateInputs,
        public_inputs: &QRPublicInputs,
    ) -> (r: Result<QuantumResistantZKProof, QRError>)
        requires
            self.wf(),
        ensures
            !self.provers().contains(proof_type@) ==> r == Err::<QuantumResistantZKProof, QRError>(QRError::NoProver),
            self.provers().contains(proof_type@) ==> (r matches Ok(p) && p.proof_type@ == proof_type@
                && p.proof_data@ == zk_proof_bytes(private_inputs.witness@, public_inputs.statement@)
                && p.public_inputs.statement@ == public_inputs.statement@ && p.public_inputs.challenge@
                == public_inputs.challenge@),
    {
        let key = text(proof_type);
        match self.qr_zk_provers.get(&key) {
            Some(prover) => {
                let proof = prover.generate_proof(private_inputs, public_inputs);
                Ok(QuantumResistantZKProof {
                    proof_type: key,
                    proof_data: proof,
                    public_inputs: QRPublicInputs {
                        statement: clone_bytes(&public_inputs.statement),
                        challenge: clone_bytes(&public_inputs.challenge),
                    },
                    timestamp: now_unix_seconds(),
                })
            },
            None => Err(QRError::NoProver),
        }
    }

    /// Whether a proof is accepted by the prover of its type; refused when
    /// there is none.
    pub fn verify_qr_zk_proof(&self, proof: &QuantumResistantZKProof) -> (r: Result<bool, QRError>)
        requires
            self.wf(),
        ensures
            !self.provers().contains(proof.proof_type@) ==> r == Err::<bool, QRError>(QRError::NoProver),
            self.provers().contains(proof.proof_type@) ==> r == Ok::<bool, QRError>(zk_proof_ok(proof.proof_data@)),
    {
        match self.qr_zk_provers.get(&proof.proof_type) {
            Some(prover) => Ok(prover.verify_proof(proof.proof_data.as_slice(), &proof.public_inputs)),
            None => Err(QRError::NoProver),
        }
    }

    /// Agrees a secret with a peer.
    pub fn quantum_safe_key_exchange(&mut self, peer_address: &Address) -> (r: SharedSecret)
        requires
            old(self).wf(),
        ensures
            final(self).wf(),
            r.secret@ == shared_secret_bytes(Seq::new(32, |i: int| 42u8), peer_address@),
            final(self).lattice() == old(self).lattice(),
            final(self).trees() == old(self).trees(),
            final(self).provers() == old(self).provers(),
            final(self).pool() == old(self).pool(),
    {
        self.pq_key_exchange.perform_key_exchange(peer_address)
    }

    /// A random value for governance drawn from the oracle's pool and the
    /// given sources.
    pub fn get_quantum_random(&self, entropy_sources: Vec<String>) -> (r: QuantumRandom)
        ensures
            r.value@ == extracted(self.pool() + concat_utf8(entropy_sources@)),
            r.entropy_sources@ == entropy_sources@,
    {
        self.quantum_oracle.generate_quantum_random(entropy_sources)
    }
}

} // verus!
