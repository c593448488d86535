use vstd::prelude::*;
use vstd::string::StringSliceAdditionalSpecFns;

verus! {

/// The `n` low bytes of `x`, least significant first.
pub open spec fn le_bytes(x: nat, n: nat) -> Seq<u8>
    decreases n,
{
    if n == 0 {
        Seq::empty()
    } else {
        seq![(x % 256) as u8] + le_bytes(x / 256, (n - 1) as nat)
    }
}

/// The `n` low bytes of `x`, most significant first.
pub open spec fn be_bytes(x: nat, n: nat) -> Seq<u8> {
    le_bytes(x, n).reverse()
}

/// The bytes a transaction proof hashes: the previous hash's text, the sender
/// and receiver identifiers (16 bytes each, big-endian, as a UUID's bytes),
/// then the amount and the timestamp (8 bytes each, two's complement,
/// little-endian).
pub open spec fn proof_message(prev_hash: Seq<u8>, sender: u128, receiver: u128, amount: i64, timestamp: i64) -> Seq<u8> {
    prev_hash + be_bytes(sender as nat, 16) + be_bytes(receiver as nat, 16) + le_bytes(
        (amount as u64) as nat,
        8,
    ) + le_bytes((timestamp as u64) as nat, 8)
}

/// What SHA-256 (`sha2::Sha256`) digests `data` to.
pub uninterp spec fn sha256_digest(data: Seq<u8>) -> Seq<u8>;

/// The lowercase hexadecimal digit of `n` (0 to 15).
pub open spec fn hex_digit(n: int) -> char {
    if n < 10 {
        (('0' as int) + n) as char
    } else {
        (('a' as int) + n - 10) as char
    }
}

/// The lowercase hexadecimal text of `data`, two digits per byte, high digit first.
pub open spec fn hex_lower(data: Seq<u8>) -> Seq<char>
    decreases data.len(),
{
    if data.len() == 0 {
        Seq::empty()
    } else {
        hex_lower(data.drop_last()) + seq![hex_digit((data.last() / 16) as int), hex_digit((data.last() % 16) as int)]
    }
}

/// The proof of a transaction: the hex SHA-256 of its proof message.
pub open spec fn spec_proof(prev_hash: Seq<u8>, sender: u128, receiver: u128, amount: i64, timestamp: i64) -> Seq<char> {
    hex_lower(sha256_digest(proof_message(prev_hash, sender, receiver, amount, timestamp)))
}

/// Whether `record_hash` is the proof of the transaction.
pub open spec fn spec_verify_integrity(
    record_hash: Seq<char>,
    prev_hash: Seq<u8>,
    sender: u128,
    receiver: u128,
    amount: i64,
    timestamp: i64,
) -> bool {
    spec_proof(prev_hash, sender, receiver, amount, timestamp) == record_hash
}

/// `Sha256::digest`: the SHA-256 digest of `data`, 32 bytes.
#[verifier::external_body]
fn sha256(data: &[u8]) -> (digest: Vec<u8>)
    ensures
        digest@ == sha256_digest(data@),
        digest@.len() == 32,
{
    <sha2::Sha256 as sha2::Digest>::digest(data).to_vec()
}

/// `hex::encode`: lowercase hexadecimal, two digits per byte.
#[verifier::external_body]
fn hex_encode(data: &[u8]) -> (text: String)
    ensures
        text@ == hex_lower(data@),
{
    hex::encode(data)
}

/// Appends the `n` low bytes of `x` to `out`, least significant first.
fn push_le_bytes(out: &mut Vec<u8>, x: u128, n: usize)
    ensures
        final(out)@ == old(out)@ + le_bytes(x as nat, n as nat),
{
    let ghost start = out@;
    let mut rest: u128 = x;
    let mut i: usize = 0;
    while i < n
        invariant
            0 <= i <= n,
            out@ + le_bytes(rest as nat, (n - i) as nat) == start + le_bytes(x as nat, n as nat),
        decreases n - i,
    {
        let ghost before = out@;
        let byte = (rest % 256) as u8;
        proof {
            assert(le_bytes(rest as nat, (n - i) as nat) == seq![byte] + le_bytes(
                (rest / 256) as nat,
                (n - i - 1) as nat,
            ));
        }
        out.push(byte);
        rest = rest / 256;
        i = i + 1;
        assert(out@ + le_bytes(rest as nat, (n - i) as nat) =~= before + (seq![byte] + le_bytes(
            rest as nat,
            (n - i) as nat,
        )));
    }
    assert(le_bytes(rest as nat, 0) =~= Seq::<u8>::empty());
    assert(out@ =~= out@ + le_bytes(rest as nat, 0));
}

/// Appends the `n` low bytes of `x` to `out`, most significant first.
fn push_be_bytes(out: &mut Vec<u8>, x: u128, n: usize)
    ensures
        final(out)@ == old(out)@ + be_bytes(x as nat, n as nat),
{
    let mut le: Vec<u8> = Vec::new();
    push_le_bytes(&mut le, x, n);
    assert(le@ =~= le_bytes(x as nat, n as nat));
    let ghost start = out@;
    let mut i: usize = le.len();
    while i > 0
        invariant
            0 <= i <= le.len(),
            out@ == start + le@.subrange(i as int, le.len() as int).reverse(),
        decreases i,
    {
        i = i - 1;
        out.push(le[i]);
        assert(out@ =~= start + le@.subrange(i as int, le.len() as int).reverse());
    }
    assert(le@.subrange(0, le.len() as int) =~= le@);
}

/// The proof message of a transaction, as bytes.
fn proof_message_bytes(prev_hash: &str, sender: u128, receiver: u128, amount: i64, timestamp: i64) -> (msg: Vec<u8>)
    ensures
        msg@ == proof_message(prev_hash.spec_bytes(), sender, receiver, amount, timestamp),
{
    let prev = prev_hash.as_bytes();
    let mut msg: Vec<u8> = Vec::new();
    let mut i: usize = 0;
    while i < prev.len()
        invariant
            0 <= i <= prev.len(),
            msg@ == prev@.take(i as int),
        decreases prev.len() - i,
    {
        msg.push(prev[i]);
        i = i + 1;
        assert(msg@ =~= prev@.take(i as int));
    }
    assert(prev@.take(prev.len() as int) =~= prev@);
    push_be_bytes(&mut msg, sender, 16);
    push_be_bytes(&mut msg, receiver, 16);
    push_le_bytes(&mut msg, #[verifier::truncate] (amount as u64) as u128, 8);
    push_le_bytes(&mut msg, #[verifier::truncate] (timestamp as u64) as u128, 8);
    msg
}

/// Generates the cryptographic proof of a transaction: the lowercase hex
/// SHA-256 of the previous hash followed by the sender, the receiver, the
/// amount and the timestamp. Deleting or changing a row of the chain breaks
/// the proofs after it.
pub fn generate_proof(prev_hash: &str, sender: u128, receiver: u128, amount: i64, timestamp: i64) -> (proof: String)
    ensures
        proof@ == spec_proof(prev_hash.spec_bytes(), sender, receiver, amount, timestamp),
{
    let msg = proof_message_bytes(prev_hash, sender, receiver, amount, timestamp);
    let digest = sha256(msg.as_slice());
    hex_encode(digest.as_slice())
}

/// Whether a transaction record matches its stored hash `record_hash`.
pub fn verify_integrity(
    record_hash: &str,
    prev_hash: &str,
    sender: u128,
    receiver: u128,
    amount: i64,
    timestamp: i64,
) -> (ok: bool)
    ensures
        ok == spec_verify_integrity(record_hash@, prev_hash.spec_bytes(), sender, receiver, amount, timestamp),
{
    let calculated = generate_proof(prev_hash, sender, receiver, amount, timestamp);
    calculated == record_hash.to_string()
}

/// 256 to the power `n`: the first number that `n` bytes cannot hold.
pub open spec fn byte_bound(n: nat) -> nat
    decreases n,
{
    if n == 0 {
        1
    } else {
        256 * byte_bound((n - 1) as nat)
    }
}

proof fn lemma_le_bytes_len(x: nat, n: nat)
    ensures
        le_bytes(x, n).len() == n,
    decreases n,
{
    if n > 0 {
        lemma_le_bytes_len(x / 256, (n - 1) as nat);
    }
}

/// Numbers that `n` bytes hold are told apart by those bytes.
proof fn lemma_le_bytes_injective(x: nat, y: nat, n: nat)
    requires
        x < byte_bound(n),
        y < byte_bound(n),
        le_bytes(x, n) == le_bytes(y, n),
    ensures
        x == y,
    decreases n,
{
    if n > 0 {
        let b = byte_bound((n - 1) as nat);
        let tx = le_bytes(x / 256, (n - 1) as nat);
        let ty = le_bytes(y / 256, (n - 1) as nat);
        assert(le_bytes(x, n) == seq![(x % 256) as u8] + tx);
        assert(le_bytes(y, n) == seq![(y % 256) as u8] + ty);
        assert(le_bytes(x, n)[0] == (x % 256) as u8);
        assert(le_bytes(y, n)[0] == (y % 256) as u8);
        assert(x % 256 == y % 256);
        assert(tx =~= le_bytes(x, n).drop_first());
        assert(ty =~= le_bytes(y, n).drop_first());
        assert(x / 256 < b) by (nonlinear_arith)
            requires
                x < 256 * b,
        ;
        assert(y / 256 < b) by (nonlinear_arith)
            requires
                y < 256 * b,
        ;
        lemma_le_bytes_injective(x / 256, y / 256, (n - 1) as nat);
        assert(x == 256 * (x / 256) + x % 256) by (nonlinear_arith);
        assert(y == 256 * (y / 256) + y % 256) by (nonlinear_arith);
    }
}

proof fn lemma_be_bytes_injective(x: nat, y: nat, n: nat)
    requires
        x < byte_bound(n),
        y < byte_bound(n),
        be_bytes(x, n) == be_bytes(y, n),
    ensures
        x == y,
{
    assert(le_bytes(x, n) =~= be_bytes(x, n).reverse());
    assert(le_bytes(y, n) =~= be_bytes(y, n).reverse());
    lemma_le_bytes_injective(x, y, n);
}

proof fn lemma_byte_bounds()
    ensures
        byte_bound(8) == 0x1_0000_0000_0000_0000,
        byte_bound(16) == 0x1_0000_0000_0000_0000_0000_0000_0000_0000,
{
    reveal_with_fuel(byte_bound, 17);
}

/// Law: the proof message determines the transaction. Two records hash the
/// same bytes only when their previous hash, sender, receiver, amount and
/// timestamp all agree; so modifying a row, or the row it is chained to,
/// changes what its proof hashes.
pub proof fn lemma_proof_message_injective(
    prev_hash1: Seq<u8>,
    sender1: u128,
    receiver1: u128,
    amount1: i64,
    timestamp1: i64,
    prev_hash2: Seq<u8>,
    sender2: u128,
    receiver2: u128,
    amount2: i64,
    timestamp2: i64,
)
    requires
        proof_message(prev_hash1, sender1, receiver1, amount1, timestamp1) == proof_message(
            prev_hash2,
            sender2,
            receiver2,
            amount2,
            timestamp2,
        ),
    ensures
        prev_hash1 == prev_hash2,
        sender1 == sender2,
        receiver1 == receiver2,
        amount1 == amount2,
        timestamp1 == timestamp2,
{
    let m1 = proof_message(prev_hash1, sender1, receiver1, amount1, timestamp1);
    let m2 = proof_message(prev_hash2, sender2, receiver2, amount2, timestamp2);
    let s1 = be_bytes(sender1 as nat, 16);
    let s2 = be_bytes(sender2 as nat, 16);
    let r1 = be_bytes(receiver1 as nat, 16);
    let r2 = be_bytes(receiver2 as nat, 16);
    let a1 = le_bytes((amount1 as u64) as nat, 8);
    let a2 = le_bytes((amount2 as u64) as nat, 8);
    let t1 = le_bytes((timestamp1 as u64) as nat, 8);
    let t2 = le_bytes((timestamp2 as u64) as nat, 8);
    lemma_le_bytes_len(sender1 as nat, 16);
    lemma_le_bytes_len(sender2 as nat, 16);
    lemma_le_bytes_len(receiver1 as nat, 16);
    lemma_le_bytes_len(receiver2 as nat, 16);
    lemma_le_bytes_len((amount1 as u64) as nat, 8);
    lemma_le_bytes_len((amount2 as u64) as nat, 8);
    lemma_le_bytes_len((timestamp1 as u64) as nat, 8);
    lemma_le_bytes_len((timestamp2 as u64) as nat, 8);
    assert(prev_hash1.len() == prev_hash2.len()) by {
        assert(m1.len() == prev_hash1.len() + 48);
        assert(m2.len() == prev_hash2.len() + 48);
    }
    let p = prev_hash1.len() as int;
    assert(m1.take(p) =~= prev_hash1);
    assert(m2.take(p) =~= prev_hash2);
    assert(m1.subrange(p, p + 16) =~= s1);
    assert(m2.subrange(p, p + 16) =~= s2);
    assert(m1.subrange(p + 16, p + 32) =~= r1);
    assert(m2.subrange(p + 16, p + 32) =~= r2);
    assert(m1.subrange(p + 32, p + 40) =~= a1);
    assert(m2.subrange(p + 32, p + 40) =~= a2);
    assert(m1.subrange(p + 40, p + 48) =~= t1);
    assert(m2.subrange(p + 40, p + 48) =~= t2);
    lemma_byte_bounds();
    lemma_be_bytes_injective(sender1 as nat, sender2 as nat, 16);
    lemma_be_bytes_injective(receiver1 as nat, receiver2 as nat, 16);
    lemma_le_bytes_injective((amount1 as u64) as nat, (amount2 as u64) as nat, 8);
    lemma_le_bytes_injective((timestamp1 as u64) as nat, (timestamp2 as u64) as nat, 8);
    assert((amount1 as u64) == (amount2 as u64) ==> amount1 == amount2) by (bit_vector);
    assert((timestamp1 as u64) == (timestamp2 as u64) ==> timestamp1 == timestamp2) by (bit_vector);
}

proof fn lemma_hex_lower_len(data: Seq<u8>)
    ensures
        hex_lower(data).len() == 2 * data.len(),
    decreases data.len(),
{
    if data.len() > 0 {
        lemma_hex_lower_len(data.drop_last());
    }
}

proof fn lemma_hex_digit_injective(a: int, b: int)
    requires
        0 <= a < 16,
        0 <= b < 16,
        hex_digit(a) == hex_digit(b),
    ensures
        a == b,
{
    let ca = hex_digit(a) as int;
    let cb = hex_digit(b) as int;
    if a < 10 {
        assert(ca == '0' as int + a);
    } else {
        assert(ca == 'a' as int + a - 10);
    }
    if b < 10 {
        assert(cb == '0' as int + b);
    } else {
        assert(cb == 'a' as int + b - 10);
    }
}

/// Hexadecimal text tells bytes apart.
proof fn lemma_hex_lower_injective(x: Seq<u8>, y: Seq<u8>)
    requires
        hex_lower(x) == hex_lower(y),
    ensures
        x == y,
    decreases x.len(),
{
    lemma_hex_lower_len(x);
    lemma_hex_lower_len(y);
    if x.len() == 0 {
        assert(x =~= y);
    } else {
        let h = hex_lower(x);
        let n = h.len() as int;
        let (bx, by) = (x.last(), y.last());
        let px = hex_lower(x.drop_last());
        let py = hex_lower(y.drop_last());
        lemma_hex_lower_len(x.drop_last());
        lemma_hex_lower_len(y.drop_last());
        assert(h == px + seq![hex_digit((bx / 16) as int), hex_digit((bx % 16) as int)]);
        assert(h == py + seq![hex_digit((by / 16) as int), hex_digit((by % 16) as int)]);
        assert(h[n - 2] == hex_digit((bx / 16) as int) && h[n - 2] == hex_digit((by / 16) as int));
        assert(h[n - 1] == hex_digit((bx % 16) as int) && h[n - 1] == hex_digit((by % 16) as int));
        lemma_hex_digit_injective((bx / 16) as int, (by / 16) as int);
        lemma_hex_digit_injective((bx % 16) as int, (by % 16) as int);
        assert(bx == by);
        assert(px =~= h.take(n - 2));
        assert(py =~= h.take(n - 2));
        lemma_hex_lower_injective(x.drop_last(), y.drop_last());
        assert(x =~= x.drop_last().push(bx));
        assert(y =~= y.drop_last().push(by));
    }
}

/// Law: a modified record fails validation. When the stored proof of one
/// record is checked against a record that differs in its previous hash,
/// sender, receiver, amount or timestamp, the check fails, provided SHA-256
/// does not collide on the two proof messages.
pub proof fn lemma_modified_record_fails(
    prev_hash: Seq<u8>,
    sender: u128,
    receiver: u128,
    amount: i64,
    timestamp: i64,
    prev_hash2: Seq<u8>,
    sender2: u128,
    receiver2: u128,
    amount2: i64,
    timestamp2: i64,
)
    requires
        !(prev_hash == prev_hash2 && sender == sender2 && receiver == receiver2 && amount == amount2 && timestamp
            == timestamp2),
        sha256_digest(proof_message(prev_hash, sender, receiver, amount, timestamp)) == sha256_digest(
            proof_message(prev_hash2, sender2, receiver2, amount2, timestamp2),
        ) ==> proof_message(prev_hash, sender, receiver, amount, timestamp) == proof_message(
            prev_hash2,
            sender2,
            receiver2,
            amount2,
            timestamp2,
        ),
    ensures
        !spec_verify_integrity(
            spec_proof(prev_hash, sender, receiver, amount, timestamp),
            prev_hash2,
            sender2,
            receiver2,
            amount2,
            timestamp2,
        ),
{
    let m1 = proof_message(prev_hash, sender, receiver, amount, timestamp);
    let m2 = proof_message(prev_hash2, sender2, receiver2, amount2, timestamp2);
    if spec_verify_integrity(spec_proof(prev_hash, sender, receiver, amount, timestamp), prev_hash2, sender2, receiver2, amount2, timestamp2) {
        lemma_hex_lower_injective(sha256_digest(m2), sha256_digest(m1));
        lemma_proof_message_injective(
            prev_hash,
            sender,
            receiver,
            amount,
            timestamp,
            prev_hash2,
            sender2,
            receiver2,
            amount2,
            timestamp2,
        );
    }
}

/// Law: a record verifies against the proof generated for it.
pub proof fn lemma_generated_proof_verifies(
    prev_hash: Seq<u8>,
    sender: u128,
    receiver: u128,
    amount: i64,
    timestamp: i64,
)
    ensures
        spec_verify_integrity(
            spec_proof(prev_hash, sender, receiver, amount, timestamp),
            prev_hash,
            sender,
            receiver,
            amount,
            timestamp,
        ),
{
}

} // verus!
